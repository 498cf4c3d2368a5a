//! Adapters: storages, eviction policies, clocks, and the event layer.
pub mod clock;
pub mod entry_laws;
pub mod eviction;
pub mod index;
pub mod layer;
pub mod layer_laws;
pub mod redis_laws;
pub mod redis_storage;
pub mod redis_sweep;
pub mod storage;
pub mod storage_laws;
pub mod visitor;
