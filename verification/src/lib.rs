//! Topology model, validation, netlist generation and mutation operators for
//! evolved analog circuits.

pub mod text;
pub mod circuit;
pub mod validate;
pub mod netlist;
pub mod rng;
pub mod mutate;
pub mod evolution;
pub mod constraints;
pub mod loot;
pub mod numbers;
pub mod cli;
pub mod spice;
pub mod parts;
pub mod preset;
pub mod vendor;
