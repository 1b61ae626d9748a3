//! Match lifecycle and session resolution for a social-matching backend.
//!
//! The crate models the state a user's record carries (identity, profile,
//! location, and the per-counterpart match entries), resolves bearer tokens
//! to unique records, drives the two-party match state machine across two
//! independently written records, and selects a meeting point for an
//! accepted pair. The document store is an external collaborator offering
//! only per-record atomicity; it is represented here by an in-memory
//! adapter stub with the same interface (field query, lookup by id,
//! optimistic versioned write).

pub mod auth;
pub mod engine;
pub mod errors;
pub mod meet;
pub mod profile;
pub mod projection;
pub mod records;
pub mod session;
pub mod store;
