//! A growing plant tissue as a set of expanding spheres: which cells are
//! neighbours, where their boundaries run, how they grow, how hormones move
//! between them, and when they divide or differentiate.
pub mod engine;
pub mod model;
pub mod shared;
