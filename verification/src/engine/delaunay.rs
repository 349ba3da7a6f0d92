//! Neighbour detection: which cells are close enough to a cell to shape its
//! boundary and to exchange hormones with it.
//!
//! With four or more cells the neighbours come from a Delaunay
//! tetrahedralization of the cell centres. The tetrahedralization itself is
//! the work of a solver outside this library: the caller runs it on the
//! centres that `solver_input` returns and hands its report to
//! `delaunay_triangulation`.
use crate::shared::cell::{overlap, overlaps, CellInformation};
use crate::shared::point::Point3;
use std::collections::HashMap;
use vstd::prelude::*;

verus! {

/// The fewest cells that span a tetrahedron.
pub const MIN_CELLS: usize = 4;

/// Four cells that form one tetrahedron of the tetrahedralization.
#[derive(Clone, Copy, Debug)]
pub struct TetraederOfCells {
    nodes: [CellInformation; 4],
}

/// What neighbour detection rests on.
#[derive(Debug)]
pub enum TetGenResult {
    /// The tetrahedra of the tetrahedralization.
    Success(Vec<TetraederOfCells>),
    /// No tetrahedralization exists: there are too few cells, or they lie in
    /// one plane. Holds the cells as they were given.
    NoTetGenPossible(Vec<CellInformation>),
}

/// What the solver reported.
#[derive(Debug)]
pub enum SolverOutcome {
    /// The solver was not run.
    NotRun,
    /// For each tetrahedron the positions, in the input, of its four corners.
    Tetrahedra(Vec<[usize; 4]>),
    /// The solver failed with this message.
    Failed(String),
}

/// Why no neighbour detection is possible.
#[derive(Debug)]
pub enum TriangulationError {
    /// There are enough cells for a tetrahedralization and the solver was
    /// not run.
    SolverNotRun,
    /// The solver failed, with its message, for another reason than points
    /// in one plane.
    SolverFailed(String),
    /// The tetrahedron at the first position names a corner, the second
    /// number, that is no position in the input.
    UnknownCorner(usize, usize),
}

/// The message with which the solver reports points in one plane.
pub open spec fn coplanar_message() -> Seq<char> {
    "TetGen failed: points are probably coplanar"@
}

impl TetraederOfCells {
    pub closed spec fn view(&self) -> Seq<CellInformation> {
        self.nodes@
    }

    pub fn new(nodes: [CellInformation; 4]) -> (t: TetraederOfCells)
        ensures
            t@ == nodes@,
    {
        TetraederOfCells { nodes }
    }

    pub fn nodes(&self) -> (n: &[CellInformation; 4])
        ensures
            n@ == self@,
    {
        &self.nodes
    }

    /// The centres of the four cells.
    pub fn points(&self) -> (p: [Point3; 4])
        ensures
            p@.len() == 4,
            forall|k: int| 0 <= k < 4 ==> p@[k] == (#[trigger] self@[k]).position,
    {
        [
            self.nodes[0].position,
            self.nodes[1].position,
            self.nodes[2].position,
            self.nodes[3].position,
        ]
    }

    /// Replaces the four cells.
    pub fn set_nodes(&mut self, nodes: [CellInformation; 4])
        ensures
            final(self)@ == nodes@,
    {
        self.nodes = nodes;
    }

    /// The sum of the four centres, coordinate by coordinate.
    pub fn center(&self) -> (c: Point3)
        requires
            forall|k: int| 0 <= k < 4 ==> (#[trigger] self@[k]).position.in_bounds(),
        ensures
            c.x == self@[0].position.x + self@[1].position.x + self@[2].position.x
                + self@[3].position.x,
            c.y == self@[0].position.y + self@[1].position.y + self@[2].position.y
                + self@[3].position.y,
            c.z == self@[0].position.z + self@[1].position.z + self@[2].position.z
                + self@[3].position.z,
    {
        let a: Point3 = self.nodes[0].position;
        let b: Point3 = self.nodes[1].position;
        let c: Point3 = self.nodes[2].position;
        let d: Point3 = self.nodes[3].position;
        proof {
            assert(self@[0].position.in_bounds());
            assert(self@[1].position.in_bounds());
            assert(self@[2].position.in_bounds());
            assert(self@[3].position.in_bounds());
        }
        Point3 { x: a.x + b.x + c.x + d.x, y: a.y + b.y + c.y + d.y, z: a.z + b.z + c.z + d.z }
    }

    /// One of the four cells has this identifier.
    pub open spec fn contains(self, id: u64) -> bool {
        self@[0].id == id || self@[1].id == id || self@[2].id == id || self@[3].id == id
    }

    /// Tells whether one of the four cells has this identifier.
    pub fn has(&self, id: u64) -> (b: bool)
        ensures
            b == self.contains(id),
    {
        self.nodes[0].id == id || self.nodes[1].id == id || self.nodes[2].id == id
            || self.nodes[3].id == id
    }
}

/// The centres of the cells, in their order.
pub open spec fn centres(cells: Seq<CellInformation>) -> Seq<Point3> {
    Seq::new(cells.len(), |i: int| cells[i].position)
}

/// What to hand to the solver: the centres of the cells, or nothing where
/// there are too few cells for the solver to be run.
pub fn solver_input(cells: &Vec<CellInformation>) -> (input: Option<Vec<Point3>>)
    ensures
        cells@.len() < MIN_CELLS ==> input is None,
        cells@.len() >= MIN_CELLS ==> input is Some && input->0@ == centres(cells@),
{
    let n: usize = cells.len();
    if n < MIN_CELLS {
        return None;
    }
    let mut points: Vec<Point3> = Vec::new();
    let mut i: usize = 0;
    while i < n
        invariant
            n == cells@.len(),
            i <= n,
            points@ == centres(cells@).subrange(0, i as int),
        decreases n - i,
    {
        points.push(cells[i].position);
        proof {
            assert(points@ =~= centres(cells@).subrange(0, i + 1));
        }
        i = i + 1;
    }
    proof {
        assert(points@ =~= centres(cells@));
    }
    Some(points)
}

/// Every corner of the tetrahedron is a position in an input of `n` cells.
pub open spec fn corners_known(corners: [usize; 4], n: int) -> bool {
    corners@[0] < n && corners@[1] < n && corners@[2] < n && corners@[3] < n
}

/// The first corner of the tetrahedron that is no position in an input of
/// `n` cells.
pub open spec fn first_unknown_corner(corners: [usize; 4], n: int) -> usize {
    if corners@[0] >= n {
        corners@[0]
    } else if corners@[1] >= n {
        corners@[1]
    } else if corners@[2] >= n {
        corners@[2]
    } else {
        corners@[3]
    }
}

/// The tetrahedron `t` holds the cells at the given corners.
pub open spec fn is_tetraeder_of(
    t: TetraederOfCells,
    cells: Seq<CellInformation>,
    corners: [usize; 4],
) -> bool {
    &&& t@.len() == 4
    &&& t@[0] == cells[corners@[0] as int]
    &&& t@[1] == cells[corners@[1] as int]
    &&& t@[2] == cells[corners@[2] as int]
    &&& t@[3] == cells[corners@[3] as int]
}

/// The report names only corners that are input positions, up to the
/// tetrahedron at `upto`.
pub open spec fn all_corners_known(report: Seq<[usize; 4]>, n: int, upto: int) -> bool {
    forall|i: int| 0 <= i < upto ==> corners_known(#[trigger] report[i], n)
}

/// Turns the solver's tetrahedra into tetrahedra of cells, or names the
/// first corner that is no input position.
pub fn tetraeders_of_cells(cells: &Vec<CellInformation>, report: &Vec<[usize; 4]>) -> (r: Result<
    Vec<TetraederOfCells>,
    TriangulationError,
>)
    ensures
        all_corners_known(report@, cells@.len() as int, report@.len() as int) ==> r is Ok
            && r->Ok_0@.len() == report@.len() && forall|i: int|
            0 <= i < report@.len() ==> is_tetraeder_of(
                #[trigger] r->Ok_0@[i],
                cells@,
                report@[i],
            ),
        !all_corners_known(report@, cells@.len() as int, report@.len() as int) ==> exists|i: int|
            0 <= i < report@.len() && all_corners_known(report@, cells@.len() as int, i)
                && !corners_known(#[trigger] report@[i], cells@.len() as int) && r == Err::<
                Vec<TetraederOfCells>,
                TriangulationError,
            >(
                TriangulationError::UnknownCorner(
                    i as usize,
                    first_unknown_corner(report@[i], cells@.len() as int),
                ),
            ),
{
    let n: usize = cells.len();
    let m: usize = report.len();
    let mut tetraeders: Vec<TetraederOfCells> = Vec::new();
    let mut i: usize = 0;
    while i < m
        invariant
            n == cells@.len(),
            m == report@.len(),
            i <= m,
            all_corners_known(report@, n as int, i as int),
            tetraeders@.len() == i,
            forall|j: int|
                0 <= j < i ==> is_tetraeder_of(#[trigger] tetraeders@[j], cells@, report@[j]),
        decreases m - i,
    {
        let corners: [usize; 4] = report[i];
        if corners[0] >= n {
            return Err(TriangulationError::UnknownCorner(i, corners[0]));
        }
        if corners[1] >= n {
            return Err(TriangulationError::UnknownCorner(i, corners[1]));
        }
        if corners[2] >= n {
            return Err(TriangulationError::UnknownCorner(i, corners[2]));
        }
        if corners[3] >= n {
            return Err(TriangulationError::UnknownCorner(i, corners[3]));
        }
        let t: TetraederOfCells = TetraederOfCells::new(
            [cells[corners[0]], cells[corners[1]], cells[corners[2]], cells[corners[3]]],
        );
        tetraeders.push(t);
        i = i + 1;
    }
    Ok(tetraeders)
}

/// Tells whether the solver's message reports points in one plane.
pub fn is_coplanar_failure(message: &String) -> (b: bool)
    ensures
        b == (message@ == coplanar_message()),
{
    let expected: String = "TetGen failed: points are probably coplanar".to_owned();
    *message == expected
}

/// Decides what neighbour detection rests on.
///
/// Fewer than four cells span no tetrahedron: the cells come back as they
/// are, whatever the solver reported. So they do where the solver found the
/// centres in one plane. Any other failure of the solver is an error, and so
/// is a tetrahedron with a corner outside the input.
pub fn delaunay_triangulation(cells: &Vec<CellInformation>, outcome: &SolverOutcome) -> (r: Result<
    TetGenResult,
    TriangulationError,
>)
    ensures
        cells@.len() < MIN_CELLS ==> r is Ok && r->Ok_0 is NoTetGenPossible
            && r->Ok_0->NoTetGenPossible_0@ == cells@,
        cells@.len() >= MIN_CELLS ==> match *outcome {
            SolverOutcome::NotRun => r == Err::<TetGenResult, TriangulationError>(
                TriangulationError::SolverNotRun,
            ),
            SolverOutcome::Failed(message) => if message@ == coplanar_message() {
                r is Ok && r->Ok_0 is NoTetGenPossible && r->Ok_0->NoTetGenPossible_0@ == cells@
            } else {
                r is Err && r->Err_0 is SolverFailed && r->Err_0->SolverFailed_0@ == message@
            },
            SolverOutcome::Tetrahedra(report) => if all_corners_known(
                report@,
                cells@.len() as int,
                report@.len() as int,
            ) {
                r is Ok && r->Ok_0 is Success && r->Ok_0->Success_0@.len() == report@.len()
                    && forall|i: int|
                    0 <= i < report@.len() ==> is_tetraeder_of(
                        #[trigger] r->Ok_0->Success_0@[i],
                        cells@,
                        report@[i],
                    )
            } else {
                exists|i: int|
                    0 <= i < report@.len() && all_corners_known(report@, cells@.len() as int, i)
                        && !corners_known(#[trigger] report@[i], cells@.len() as int) && r == Err::<
                        TetGenResult,
                        TriangulationError,
                    >(
                        TriangulationError::UnknownCorner(
                            i as usize,
                            first_unknown_corner(report@[i], cells@.len() as int),
                        ),
                    )
            },
        },
{
    if cells.len() < MIN_CELLS {
        return Ok(TetGenResult::NoTetGenPossible(cells.clone()));
    }
    match outcome {
        SolverOutcome::NotRun => Err(TriangulationError::SolverNotRun),
        SolverOutcome::Failed(message) => {
            if is_coplanar_failure(message) {
                Ok(TetGenResult::NoTetGenPossible(cells.clone()))
            } else {
                Err(TriangulationError::SolverFailed(message.clone()))
            }
        },
        SolverOutcome::Tetrahedra(report) => {
            match tetraeders_of_cells(cells, report) {
                Ok(tetraeders) => Ok(TetGenResult::Success(tetraeders)),
                Err(e) => Err(e),
            }
        },
    }
}

/// `other` is a neighbour of `cell`: another cell that shares a tetrahedron
/// with it or, where there are no tetrahedra, another cell of the list that
/// overlaps it.
pub open spec fn is_neighbor(
    cell: CellInformation,
    result: TetGenResult,
    other: CellInformation,
) -> bool {
    match result {
        TetGenResult::Success(tetraeders) => shares_tetraeder(
            cell.id,
            tetraeders@,
            tetraeders@.len() as int,
            0,
            other,
        ),
        TetGenResult::NoTetGenPossible(cells) => overlaps_among(
            cell,
            cells@,
            cells@.len() as int,
            other,
        ),
    }
}

/// `other` is one of the first `k` cells of `nodes`.
pub open spec fn among_first(nodes: Seq<CellInformation>, k: int, other: CellInformation) -> bool {
    exists|j: int| 0 <= j < k && #[trigger] nodes[j] == other
}

/// `other` does not have the identifier `id` and shares a tetrahedron with
/// the cell that has it: one of the first `upto` tetrahedra holds both, or
/// the tetrahedron at `upto` holds the cell and has `other` among its first
/// `k` cells.
pub open spec fn shares_tetraeder(
    id: u64,
    tetraeders: Seq<TetraederOfCells>,
    upto: int,
    k: int,
    other: CellInformation,
) -> bool {
    other.id != id && ((exists|i: int|
        0 <= i < upto && (#[trigger] tetraeders[i]).contains(id) && among_first(
            tetraeders[i]@,
            4,
            other,
        )) || (k > 0 && tetraeders[upto].contains(id) && among_first(tetraeders[upto]@, k, other)))
}

/// `other` is another cell than `cell`, is among the first `upto` cells and
/// overlaps `cell`.
pub open spec fn overlaps_among(
    cell: CellInformation,
    cells: Seq<CellInformation>,
    upto: int,
    other: CellInformation,
) -> bool {
    other.id != cell.id && overlaps(cell, other) && among_first(cells, upto, other)
}

/// Looking at one more cell of a tetrahedron adds that cell, if the
/// tetrahedron holds the cell with the identifier and it is another one.
proof fn lemma_shares_step(
    id: u64,
    tetraeders: Seq<TetraederOfCells>,
    upto: int,
    k: int,
    other: CellInformation,
)
    requires
        0 <= k < 4,
    ensures
        shares_tetraeder(id, tetraeders, upto, k + 1, other) <==> (shares_tetraeder(
            id,
            tetraeders,
            upto,
            k,
            other,
        ) || (other.id != id && tetraeders[upto].contains(id) && tetraeders[upto]@[k] == other)),
{
    let nodes = tetraeders[upto]@;
    if among_first(nodes, k + 1, other) {
        let j = choose|j: int| 0 <= j < k + 1 && #[trigger] nodes[j] == other;
        if j < k {
            assert(among_first(nodes, k, other));
        }
    }
    if among_first(nodes, k, other) {
        let j = choose|j: int| 0 <= j < k && #[trigger] nodes[j] == other;
        assert(nodes[j] == other);
    }
    if nodes[k] == other {
        assert(among_first(nodes, k + 1, other));
    }
}

/// A tetrahedron that was looked at whole counts among those before the
/// next; one that does not hold the cell adds nothing.
proof fn lemma_shares_next(
    id: u64,
    tetraeders: Seq<TetraederOfCells>,
    upto: int,
    k: int,
    other: CellInformation,
)
    requires
        0 <= upto,
        k == 4 || !tetraeders[upto].contains(id),
    ensures
        shares_tetraeder(id, tetraeders, upto + 1, 0, other) <==> shares_tetraeder(
            id,
            tetraeders,
            upto,
            k,
            other,
        ),
{
    if shares_tetraeder(id, tetraeders, upto + 1, 0, other) {
        let i = choose|i: int|
            0 <= i < upto + 1 && (#[trigger] tetraeders[i]).contains(id) && among_first(
                tetraeders[i]@,
                4,
                other,
            );
        if i < upto {
            assert(tetraeders[i].contains(id));
        }
    }
    if shares_tetraeder(id, tetraeders, upto, k, other) {
        if k > 0 && tetraeders[upto].contains(id) && among_first(tetraeders[upto]@, k, other) {
            assert(tetraeders[upto].contains(id) && among_first(tetraeders[upto]@, 4, other));
        } else {
            let i = choose|i: int|
                0 <= i < upto && (#[trigger] tetraeders[i]).contains(id) && among_first(
                    tetraeders[i]@,
                    4,
                    other,
                );
            assert(tetraeders[i].contains(id));
        }
    }
}

/// Looking at one more cell of the list adds that cell, if it is another
/// one and overlaps.
proof fn lemma_overlaps_step(
    cell: CellInformation,
    cells: Seq<CellInformation>,
    upto: int,
    other: CellInformation,
)
    requires
        0 <= upto,
    ensures
        overlaps_among(cell, cells, upto + 1, other) <==> (overlaps_among(cell, cells, upto, other)
            || (other.id != cell.id && overlaps(cell, other) && cells[upto] == other)),
{
    if among_first(cells, upto + 1, other) {
        let j = choose|j: int| 0 <= j < upto + 1 && #[trigger] cells[j] == other;
        if j < upto {
            assert(among_first(cells, upto, other));
        }
    }
    if among_first(cells, upto, other) {
        let j = choose|j: int| 0 <= j < upto && #[trigger] cells[j] == other;
        assert(cells[j] == other);
    }
    if cells[upto] == other {
        assert(among_first(cells, upto + 1, other));
    }
}

/// The valid geometry that the overlap test needs.
pub open spec fn near_cells_wf(cell: CellInformation, result: TetGenResult) -> bool {
    match result {
        TetGenResult::Success(_) => true,
        TetGenResult::NoTetGenPossible(cells) => cell.wf() && forall|i: int|
            0 <= i < cells@.len() ==> (#[trigger] cells@[i]).wf(),
    }
}

/// Finds the neighbours of a cell, each under its identifier.
///
/// If there are tetrahedra: from each tetrahedron that holds the cell, all
/// its other cells. If there are none: all other cells whose distance from
/// the cell is smaller than the sum of the two radii. A cell that no
/// tetrahedron holds has no neighbours.
pub fn get_near_cells(cell: &CellInformation, tet_gen_result: &TetGenResult) -> (near_cells: HashMap<
    u64,
    CellInformation,
>)
    requires
        near_cells_wf(*cell, *tet_gen_result),
    ensures
        forall|other: CellInformation| #[trigger]
            is_neighbor(*cell, *tet_gen_result, other) ==> near_cells@.contains_key(other.id),
        forall|id: u64| #[trigger]
            near_cells@.contains_key(id) ==> near_cells@[id].id == id && is_neighbor(
                *cell,
                *tet_gen_result,
                near_cells@[id],
            ),
{
    broadcast use vstd::std_specs::hash::group_hash_axioms;

    let mut near_cells: HashMap<u64, CellInformation> = HashMap::new();
    match tet_gen_result {
        TetGenResult::Success(tetraeders) => {
            let n: usize = tetraeders.len();
            let mut i: usize = 0;
            while i < n
                invariant
                    n == tetraeders@.len(),
                    i <= n,
                    forall|other: CellInformation| #[trigger]
                        shares_tetraeder(cell.id, tetraeders@, i as int, 0, other)
                            ==> near_cells@.contains_key(other.id),
                    forall|id: u64| #[trigger]
                        near_cells@.contains_key(id) ==> near_cells@[id].id == id
                            && shares_tetraeder(cell.id, tetraeders@, i as int, 0, near_cells@[id]),
                decreases n - i,
            {
                let t: &TetraederOfCells = &tetraeders[i];
                let mut k: usize = 0;
                if t.has(cell.id) {
                    while k < 4
                        invariant
                            n == tetraeders@.len(),
                            i < n,
                            k <= 4,
                            *t == tetraeders@[i as int],
                            t.contains(cell.id),
                            t@.len() == 4,
                            forall|other: CellInformation| #[trigger]
                                shares_tetraeder(cell.id, tetraeders@, i as int, k as int, other)
                                    ==> near_cells@.contains_key(other.id),
                            forall|id: u64| #[trigger]
                                near_cells@.contains_key(id) ==> near_cells@[id].id == id
                                    && shares_tetraeder(
                                    cell.id,
                                    tetraeders@,
                                    i as int,
                                    k as int,
                                    near_cells@[id],
                                ),
                        decreases 4 - k,
                    {
                        let other: CellInformation = t.nodes()[k];
                        let ghost before = near_cells@;
                        if other.id != cell.id {
                            near_cells.insert(other.id, other);
                        }
                        proof {
                            assert forall|c: CellInformation| #[trigger]
                                shares_tetraeder(
                                    cell.id,
                                    tetraeders@,
                                    i as int,
                                    k + 1,
                                    c,
                                ) implies near_cells@.contains_key(c.id) by {
                                lemma_shares_step(cell.id, tetraeders@, i as int, k as int, c);
                            }
                            assert forall|id: u64| #[trigger]
                                near_cells@.contains_key(id) implies near_cells@[id].id == id
                                && shares_tetraeder(
                                cell.id,
                                tetraeders@,
                                i as int,
                                k + 1,
                                near_cells@[id],
                            ) by {
                                lemma_shares_step(
                                    cell.id,
                                    tetraeders@,
                                    i as int,
                                    k as int,
                                    near_cells@[id],
                                );
                                if other.id != cell.id && id == other.id {
                                } else {
                                    assert(before.contains_key(id));
                                }
                            }
                        }
                        k = k + 1;
                    }
                }
                proof {
                    assert forall|c: CellInformation| #[trigger]
                        shares_tetraeder(
                            cell.id,
                            tetraeders@,
                            i + 1,
                            0,
                            c,
                        ) implies near_cells@.contains_key(c.id) by {
                        lemma_shares_next(cell.id, tetraeders@, i as int, k as int, c);
                    }
                    assert forall|id: u64| #[trigger]
                        near_cells@.contains_key(id) implies near_cells@[id].id == id
                        && shares_tetraeder(cell.id, tetraeders@, i + 1, 0, near_cells@[id]) by {
                        lemma_shares_next(
                            cell.id,
                            tetraeders@,
                            i as int,
                            k as int,
                            near_cells@[id],
                        );
                    }
                }
                i = i + 1;
            }
        },
        TetGenResult::NoTetGenPossible(result_cells) => {
            let n: usize = result_cells.len();
            let mut i: usize = 0;
            while i < n
                invariant
                    n == result_cells@.len(),
                    i <= n,
                    cell.wf(),
                    forall|j: int|
                        0 <= j < result_cells@.len() ==> (#[trigger] result_cells@[j]).wf(),
                    forall|other: CellInformation| #[trigger]
                        overlaps_among(*cell, result_cells@, i as int, other)
                            ==> near_cells@.contains_key(other.id),
                    forall|id: u64| #[trigger]
                        near_cells@.contains_key(id) ==> near_cells@[id].id == id
                            && overlaps_among(*cell, result_cells@, i as int, near_cells@[id]),
                decreases n - i,
            {
                let other: CellInformation = result_cells[i];
                let ghost before = near_cells@;
                if other.id != cell.id && overlap(cell, &other) {
                    near_cells.insert(other.id, other);
                }
                proof {
                    assert forall|c: CellInformation| #[trigger]
                        overlaps_among(
                            *cell,
                            result_cells@,
                            i + 1,
                            c,
                        ) implies near_cells@.contains_key(c.id) by {
                        lemma_overlaps_step(*cell, result_cells@, i as int, c);
                    }
                    assert forall|id: u64| #[trigger]
                        near_cells@.contains_key(id) implies near_cells@[id].id == id
                        && overlaps_among(*cell, result_cells@, i + 1, near_cells@[id]) by {
                        lemma_overlaps_step(*cell, result_cells@, i as int, near_cells@[id]);
                        if other.id != cell.id && overlaps(*cell, other) && id == other.id {
                        } else {
                            assert(before.contains_key(id));
                        }
                    }
                }
                i = i + 1;
            }
        },
    }
    near_cells
}

} // verus!
