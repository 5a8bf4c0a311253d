//! A small neural-network training engine: a composable dataset and batching
//! pipeline, and the protocol by which modules are chained and scheduled.

pub mod data;
pub mod iterator;
pub mod loss;
pub mod model;
pub mod module;
pub mod optim;
