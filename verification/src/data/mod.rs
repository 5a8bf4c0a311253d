//! Datasets, samplers and the loader that turns them into batches.

pub mod data_loader;
pub mod dataset;
pub mod random;
pub mod sampler;

pub use data_loader::DataLoader;
pub use dataset::{Basic, Dataset, IterableDataset};
pub use sampler::{RandomSampler, Sampler, SequentialSampler};
