//! Core library of a newsletter delivery service: validated domain types,
//! and an idempotent-request persistence subsystem that lets a write
//! endpoint tolerate client retries without repeating side effects.
//!
//! The `idempotency` module is the heart: it claims exclusive ownership of a
//! request key, records the outcome of processing atomically with the claim,
//! and replays the recorded response verbatim to every later caller.

pub mod domain;
pub mod idempotency;
pub mod routes;
pub mod startup;
pub mod utils;
