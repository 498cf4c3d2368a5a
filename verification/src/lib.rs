//! Rate limiting for log events.
//!
//! Events are told apart by their signature: level, name, target, and those fields that are
//! chosen to count. Each signature has a policy of its own, which decides event by event what
//! passes; what is suppressed is counted, and summaries say how much it was. Where limiting itself
//! fails, events pass.
//!
//! - [`domain`]: policies, signatures, counters and summaries.
//! - [`application`]: the registry of signatures, the limiter, the emitter of summaries, the
//!   circuit breaker that lets events pass when something is wrong, and the counts.
//! - [`infrastructure`]: storages, eviction policies, clocks, and the layer that puts all of it
//!   together.
//! - [`time`] and [`text`]: instants and durations as plain numbers; order and digits of strings.
//!
//! All that is executable here is proved to do what its contract says. Laws that span several
//! functions are stated and proved as `law_...` functions beside them.
pub mod application;
pub mod domain;
pub mod infrastructure;
pub mod model_laws;
pub mod text;
pub mod text_laws;
pub mod time;

pub use application::circuit_breaker::{CircuitBreaker, CircuitBreakerConfig, CircuitState};
pub use application::emitter::{
    EmitterConfig, EmitterConfigError, EmitterEvent, EmitterStep, EmitterTask, ShutdownError,
    SummaryEmitter,
};
pub use application::limiter::{LimitDecision, RateLimiter};
pub use application::metrics::{Metrics, MetricsSnapshot};
pub use application::ports::{Clock, EvictionCandidate, EvictionPolicy, Storage, StorageKey};
pub use application::registry::{EventState, SuppressionRegistry};
pub use domain::fields::FieldMap;
pub use domain::metadata::EventMetadata;
pub use domain::policy::{
    CountBasedPolicy, ExponentialBackoffPolicy, Policy, PolicyDecision, PolicyError,
    RateLimitPolicy, TimeWindowPolicy, TokenBucketPolicy,
};
pub use domain::signature::EventSignature;
pub use domain::summary::{SuppressionCounter, SuppressionSummary};
pub use infrastructure::clock::{AnyClock, SystemClock};
pub use infrastructure::eviction::{AnyEviction, EvictionStrategy, PriorityFn};
pub use infrastructure::layer::{
    BuildError, EventRecord, SummaryFormatter, TracingRateLimitLayer, TracingRateLimitLayerBuilder,
};
pub use infrastructure::redis_storage::RedisStorageConfig;
pub use infrastructure::storage::ShardedStorage;
pub use time::{Duration, Instant};
