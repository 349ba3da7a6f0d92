pub mod cell;
pub mod decay;
pub mod fixed;
pub mod lookup;
pub mod math;
pub mod overlapping_cells;
pub mod point;
