//! Runtime lifecycle management.

pub mod lifecycle;

pub use lifecycle::{Lifecycle, LifecycleState};
