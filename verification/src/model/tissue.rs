//! Tissues: named collections of cells that share their configuration and
//! their division policy.
use crate::shared::cell::CellInformation;
use crate::shared::math::{dot, Vector3};
use crate::shared::fixed::lemma_mul_bound;
use vstd::prelude::*;

verus! {

/// The kind of a tissue.
#[derive(Clone, Copy, Debug, PartialEq, Eq, Hash, Structural)]
pub enum TissueType {
    /// A tissue of regularly dividing cells.
    Meristem,
    /// A tissue of far differentiated cells "filling up" many parts of a
    /// plant.
    Parenchyma,
}

/// How a growing tissue grows.
#[derive(Clone, Copy, Debug)]
pub struct GrowingConfig {
    /// The displacement of a daughter cell from its parent.
    pub growing_direction: Vector3,
    /// The cell that lies farthest along the growing direction, the target
    /// of active transport, with its identifier.
    pub central_cell: Option<(u64, CellInformation)>,
}

/// What the cells of a tissue share.
#[derive(Clone, Copy, Debug)]
pub struct TissueConfig {
    /// The ceiling that the volume of a cell approaches.
    pub max_cell_volume: i64,
    pub auxin_production_rate: i64,
    /// Present in tissues that grow.
    pub growing_config: Option<GrowingConfig>,
    pub diffusion_factor: i64,
    pub active_transport_factor: i64,
}

/// A tissue with the identifiers of its organ and of its cells.
#[derive(Debug)]
pub struct Tissue {
    pub kind: TissueType,
    pub organ_ref: u64,
    pub cell_refs: Vec<u64>,
    pub config: TissueConfig,
}

impl TissueType {
    /// Only a meristem divides and differentiates.
    pub open spec fn divides(self) -> bool {
        self == TissueType::Meristem
    }

    /// Tells whether cells of this kind of tissue divide and differentiate.
    pub fn can_divide(&self) -> (b: bool)
        ensures
            b == self.divides(),
    {
        match self {
            TissueType::Meristem => true,
            TissueType::Parenchyma => false,
        }
    }

    /// The name of the kind.
    pub fn name(&self) -> (s: &'static str)
        ensures
            *self == TissueType::Meristem ==> s@ == "Meristem"@,
            *self == TissueType::Parenchyma ==> s@ == "Parenchyma"@,
    {
        match self {
            TissueType::Meristem => "Meristem",
            TissueType::Parenchyma => "Parenchyma",
        }
    }
}

impl Tissue {
    /// A tissue without cells.
    pub fn new(tissue_type: TissueType, config: TissueConfig, organ: u64) -> (t: Tissue)
        ensures
            t.kind == tissue_type,
            t.organ_ref == organ,
            t.cell_refs@ == Seq::<u64>::empty(),
            t.config == config,
    {
        Tissue { kind: tissue_type, organ_ref: organ, cell_refs: Vec::new(), config }
    }
}

impl GrowingConfig {
    /// A configuration without a central cell.
    pub fn new(growing_direction: Vector3) -> (c: GrowingConfig)
        ensures
            c.growing_direction == growing_direction,
            c.central_cell is None,
    {
        GrowingConfig { growing_direction, central_cell: None }
    }
}

/// How far a cell lies along a direction: the scalar product of the
/// direction with the cell's position.
pub open spec fn advance(direction: Vector3, cell: CellInformation) -> int {
    dot(
        direction.x as int,
        direction.y as int,
        direction.z as int,
        cell.position.x as int,
        cell.position.y as int,
        cell.position.z as int,
    )
}

/// The cell at `index` is the central cell: none lies farther along the
/// direction, and every cell after it lies less far.
pub open spec fn is_central(
    direction: Vector3,
    cells: Seq<(u64, CellInformation)>,
    index: int,
) -> bool {
    &&& 0 <= index < cells.len()
    &&& forall|i: int|
        0 <= i < cells.len() ==> advance(direction, (#[trigger] cells[i]).1) <= advance(
            direction,
            cells[index].1,
        )
    &&& forall|i: int|
        index < i < cells.len() ==> advance(direction, (#[trigger] cells[i]).1) < advance(
            direction,
            cells[index].1,
        )
}

/// Finds the central cell of a tissue: the cell that lies farthest along the
/// growing direction, the last of them if there are several. A tissue
/// without cells has none.
pub fn find_central_cell(direction: &Vector3, cells: &Vec<(u64, CellInformation)>) -> (central:
    Option<(u64, CellInformation)>)
    requires
        direction.in_bounds(),
        forall|i: int| 0 <= i < cells@.len() ==> (#[trigger] cells@[i]).1.position.in_bounds(),
    ensures
        cells@.len() == 0 ==> central is None,
        cells@.len() > 0 ==> central is Some && exists|index: int|
            is_central(*direction, cells@, index) && #[trigger] cells@[index] == central->0,
{
    let n: usize = cells.len();
    if n == 0 {
        return None;
    }
    let mut best: usize = 0;
    let mut best_advance: i128 = advance_of(direction, &cells[0].1);
    let mut i: usize = 1;
    while i < n
        invariant
            n == cells@.len(),
            1 <= i <= n,
            best < i,
            direction.in_bounds(),
            forall|k: int| 0 <= k < cells@.len() ==> (#[trigger] cells@[k]).1.position.in_bounds(),
            best_advance == advance(*direction, cells@[best as int].1),
            forall|k: int|
                0 <= k < i ==> advance(*direction, (#[trigger] cells@[k]).1) <= best_advance,
            forall|k: int|
                best < k < i ==> advance(*direction, (#[trigger] cells@[k]).1) < best_advance,
        decreases n - i,
    {
        let a: i128 = advance_of(direction, &cells[i].1);
        if a >= best_advance {
            best = i;
            best_advance = a;
        }
        i = i + 1;
    }
    proof {
        assert(is_central(*direction, cells@, best as int));
    }
    Some(cells[best])
}

/// Computes how far a cell lies along a direction.
pub fn advance_of(direction: &Vector3, cell: &CellInformation) -> (a: i128)
    requires
        direction.in_bounds(),
        cell.position.in_bounds(),
    ensures
        a == advance(*direction, *cell),
{
    proof {
        lemma_mul_bound(
            direction.x as int,
            cell.position.x as int,
            1_000_000_000_000,
            1_000_000_000_000,
        );
        lemma_mul_bound(
            direction.y as int,
            cell.position.y as int,
            1_000_000_000_000,
            1_000_000_000_000,
        );
        lemma_mul_bound(
            direction.z as int,
            cell.position.z as int,
            1_000_000_000_000,
            1_000_000_000_000,
        );
    }
    (direction.x as i128) * (cell.position.x as i128) + (direction.y as i128) * (
    cell.position.y as i128) + (direction.z as i128) * (cell.position.z as i128)
}

} // verus!
