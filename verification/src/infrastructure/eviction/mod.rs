//! Eviction policies: which entry goes when a storage is full.
pub mod any;
pub mod lru;
pub mod memory;
pub mod priority;
pub mod priority_with_memory;
pub mod strategy;

pub use any::AnyEviction;
pub use lru::LruEviction;
pub use memory::MemoryEviction;
pub use priority::{Priority, PriorityEviction, PriorityFn};
pub use priority_with_memory::PriorityWithMemoryEviction;
pub use strategy::EvictionStrategy;
