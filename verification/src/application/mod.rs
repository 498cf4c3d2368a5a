//! What ties the rules together: the registry, the limiter, the emitter, and what guards them.
pub mod circuit_breaker;
pub mod emitter;
pub mod limiter;
pub mod limiter_laws;
pub mod metrics;
pub mod ports;
pub mod registry;
pub mod shared_counts;
