//! Description of a source workspace (crates, dependency edges, runnables)
//! and a loader core that resolves each compilation unit to its source root,
//! collects per-unit file reads, and assembles the results into a mapping
//! keyed by unit name.

pub mod model;
pub mod paths;
pub mod fanout;
pub mod loader;
pub mod mapping;
pub mod resolve;

pub use model::{Runnable, RunnableKind};
