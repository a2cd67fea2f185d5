//! Self-improvement engine: the verified core of the Loop 0 lifecycle
//! (perceive, critique, policy revision, identity check, persist).
pub mod float_bits;
pub mod text;
pub mod types;
pub mod table;
pub mod json;
pub mod ranking;
pub mod error;
pub mod persistence;
pub mod policy;
pub mod identity;
pub mod critic;
pub mod perceive;
pub mod self_model;
pub mod shadow;

pub use error::SieError;
