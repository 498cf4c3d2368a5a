//! The rules of rate limiting: policies, signatures, counters and summaries.
pub mod fields;
pub mod metadata;
pub mod policy;
pub mod policy_laws;
pub mod signature;
pub mod summary;
pub mod summary_laws;
