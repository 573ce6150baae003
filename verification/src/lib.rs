//! Parent/child relationships between entities, and the rewriting of the
//! entity identifiers a component holds when entities are relocated.

pub mod children;
pub mod entity;
pub mod remap;
mod storage;

pub use children::Children;
pub use entity::EntityId;
pub use remap::{EntityRemapper, RemapError};
