pub mod cell;
pub mod entity;
pub mod hormone;
pub mod organ;
pub mod species;
pub mod tissue;
pub mod transport;
