pub mod cell_events;
pub mod cell_renderer;
pub mod delaunay;
pub mod differentiation;
pub mod links;
pub mod selection;
pub mod simulation;
pub mod state;
