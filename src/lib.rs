//! Building blocks of an evolving-creatures simulation: genomes, genetic
//! operators, the neural-network weight layout and the reproduction rules.

pub mod chromosome;
pub mod crossover;
pub mod genetic_algorithm;
pub mod genome;
pub mod network;
pub mod random;
pub mod reproduction;
pub mod selection;
pub mod statistics;
