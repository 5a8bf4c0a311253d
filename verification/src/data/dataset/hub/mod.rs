//! Datasets that come from files in well-known formats.

pub mod idx;
pub mod mnist;

pub use mnist::MNIST;
