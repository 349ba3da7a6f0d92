//! The neighbours that a cell exchanges hormones with and is pushed away by.
use crate::shared::cell::CellInformation;
use crate::model::hormone::Phytohormones;
use vstd::prelude::*;

verus! {

/// The cells that overlap one cell: for each its identifier, its geometry
/// and a snapshot of its hormone levels.
pub struct OverlappingCells(pub Vec<(u64, CellInformation, Phytohormones)>);

impl OverlappingCells {
    /// The geometry of the overlapping cells, in their order.
    pub open spec fn geometry(self) -> Seq<CellInformation> {
        Seq::new(self.0@.len(), |i: int| self.0@[i].1)
    }

    /// Every overlapping cell has hormone levels within the limit.
    pub open spec fn hormones_wf(self) -> bool {
        forall|i: int| 0 <= i < self.0@.len() ==> (#[trigger] self.0@[i]).2.wf()
    }

    /// Every overlapping cell has valid geometry.
    pub open spec fn wf(self) -> bool {
        forall|i: int| 0 <= i < self.0@.len() ==> (#[trigger] self.0@[i]).1.wf()
    }
}

} // verus!
