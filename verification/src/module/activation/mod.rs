//! Modules without trainable parameters.

pub mod identity;

pub use identity::Identity;
