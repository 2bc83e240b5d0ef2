//! A small artificial-life simulator: organisms on a toroidal world that
//! swim, age, breed by nearest-neighbour pairing with diploid inheritance,
//! and die, under a population cap.

pub mod config;
pub mod creature;
pub mod gene;
pub mod random;
pub mod utils;
pub mod world;
