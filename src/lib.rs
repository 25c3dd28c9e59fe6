//! Evolving neural-network agents: network encoding, genetic operators,
//! generation bookkeeping and population-based tuning of hyperparameters.

pub mod rng;

pub mod chromosome;
pub mod network;
pub mod matrix_network;
pub mod topology;
pub mod util;

pub mod crossover;
pub mod genetic;
pub mod mutation;
pub mod selection;

pub mod animal_individual;
pub mod generation;
pub mod statistics;

pub mod config;
pub mod optimization;
