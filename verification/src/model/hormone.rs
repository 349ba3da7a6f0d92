//! Plant hormone levels of one cell.
use crate::shared::fixed::in_limit;
use vstd::prelude::*;

verus! {

/// The hormone levels that one cell owns.
#[derive(Clone, Copy, Debug, PartialEq, Eq, Structural)]
pub struct Phytohormones {
    /// The amount of auxins, the elongation hormones that mostly promote
    /// growth.
    pub auxin_level: i64,
    /// The amount of cytokinins.
    pub cytokinin_level: i64,
}

impl Phytohormones {
    /// Both levels are within the limit.
    pub open spec fn wf(self) -> bool {
        in_limit(self.auxin_level as int) && in_limit(self.cytokinin_level as int)
    }

    /// A cell without hormones.
    pub fn new() -> (h: Phytohormones)
        ensures
            h == (Phytohormones { auxin_level: 0, cytokinin_level: 0 }),
    {
        Phytohormones { auxin_level: 0, cytokinin_level: 0 }
    }
}

/// A report that an amount of hormones has left one cell for another. The
/// sender has already given the amount up; whoever owns the target adds it.
#[derive(Clone, Copy, Debug, PartialEq, Eq, Structural)]
pub struct HormoneFlowEvent {
    pub target_cell: u64,
    pub amount: Phytohormones,
}

} // verus!
